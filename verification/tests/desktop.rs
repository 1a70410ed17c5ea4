use mavis_core::bridge::{health_reply_ok, request_step, RequestStep, REQUEST_ATTEMPTS};
use mavis_core::audio::{stt_attempt_limit_secs, stt_next, stt_reply_text, stt_request, SttNext, STT_ATTEMPTS,
    transcription_outcome, vad_step, Transcribed, VadCounts, VadEnd, VadLimits,
    capture_step, choose_input_device, choose_stream, device_score, pick_rate, shown_after, CaptureGate,
    CaptureStep, InputFormat, StreamRange, MIN_UTTERANCE_SAMPLES, POST_SPEECH_COOLDOWN_NS, STREAM_SETTLE_NS,
};
use mavis_core::bridge::{
    frame, frame_length, health_tick, ChildState, Launch, TickAction, WorkerLifecycle, CRASH_WINDOW_NS,
};
use mavis_core::compositor::{
    hypr_active, hypr_active_of, niri_focused, niri_focused_of, niri_windows, niri_windows_of, probe_ok,
    project_cache_fresh, sway_focused, sway_focused_of, telling_cwd, wayland_candidates, window_key, x11_ok,
    ChangeFilter, Compositor,
};
use mavis_core::json::Json;
use mavis_core::executor::{tts_audio, tts_reply};
use mavis_core::platform::{
    add_child, branch_from_head, descendants_from_tree, mac_app_entry, parse_desktop_file, parse_png_dimensions,
    ppid_from_stat, shortcut_entry, strip_field_codes, AppCatalog, Platform,
};
use mavis_core::system::browser::{browser_tab, extract_domain, tab_from};
use mavis_core::system::calendar::{minutes_until, next_event_from_ics, parse_dtstart, unfold};
use mavis_core::system::control::{control_command, media_done, mpris_member, notification_done, ControlCommand};
use mavis_core::system::hotkeys::{hotkey_intent, intent_from};
use mavis_core::text::parse_u32;
use mavis_core::ui::{interrupts_speech, orb_position, orb_state_from, speaking_after, state_color, OrbState};
use mavis_core::models::EventType;
use std::collections::HashMap;

// ---------------------------------------------------------------------
// Listening
// ---------------------------------------------------------------------

#[test]
fn microphones_are_scored_by_name() {
    assert_eq!(device_score("Front: Generic Analog"), 100);
    assert_eq!(device_score("sysdefault:CARD=Generic"), 90);
    assert_eq!(device_score("Built-in Analog Stereo"), 80);
    assert_eq!(device_score("USB mic"), 70);
    assert_eq!(device_score("bluez_input.headset"), 0);
    assert_eq!(device_score("HDMI Output Monitor"), 0);
}

#[test]
fn the_asked_for_microphone_wins_then_the_best_scored() {
    let names: Vec<String> = vec!["HDMI 1".into(), "USB mic".into(), "Front Generic".into(), "Front Generic".into()];
    assert_eq!(choose_input_device(&names, Some("USB mic")), Some(1));
    assert_eq!(choose_input_device(&names, Some("missing")), Some(2));
    assert_eq!(choose_input_device(&names, None), Some(2));
    assert_eq!(choose_input_device(&[], None), None);
}

fn range(format: InputFormat, min_rate: u32, max_rate: u32, channels: u16) -> StreamRange {
    StreamRange { format, min_rate, max_rate, channels }
}

#[test]
fn streams_prefer_float_and_sixteen_kilohertz() {
    assert_eq!(pick_rate(&range(InputFormat::F32, 8000, 96000, 1)), 16000);
    assert_eq!(pick_rate(&range(InputFormat::F32, 44100, 48000, 1)), 48000);
    assert_eq!(pick_rate(&range(InputFormat::F32, 96000, 192000, 1)), 192000);
    let ranges = vec![
        range(InputFormat::I16, 16000, 16000, 1),
        range(InputFormat::F32, 48000, 48000, 2),
        range(InputFormat::F32, 44100, 96000, 1),
        range(InputFormat::Other, 16000, 16000, 1),
    ];
    // Both float ranges open at 48 kHz; the mono one wins.
    assert_eq!(choose_stream(&ranges), Some((2, 48000)));
    let ranges = vec![range(InputFormat::F32, 96000, 96000, 1), range(InputFormat::F32, 16000, 48000, 2)];
    assert_eq!(choose_stream(&ranges), Some((1, 16000)));
    assert_eq!(choose_stream(&[range(InputFormat::Other, 16000, 16000, 1)]), None);
}

#[test]
fn buffers_wait_for_the_stream_to_settle_and_for_speech_to_end() {
    let mut g = CaptureGate::new();
    let a = g.intake(true, STREAM_SETTLE_NS - 1, false, 0);
    assert!(!a.analyse && !a.reset_detector);
    let a = g.intake(true, STREAM_SETTLE_NS, false, 0);
    assert!(a.analyse);
    let a = g.intake(true, STREAM_SETTLE_NS, true, 10);
    assert!(!a.analyse && a.reset_detector);
    // First buffer after speech: reset, cooldown starts.
    let a = g.intake(true, STREAM_SETTLE_NS, false, 100);
    assert!(!a.analyse && a.reset_detector);
    let a = g.intake(true, STREAM_SETTLE_NS, false, 100 + POST_SPEECH_COOLDOWN_NS - 1);
    assert!(!a.analyse && !a.reset_detector);
    let a = g.intake(true, STREAM_SETTLE_NS, false, 100 + POST_SPEECH_COOLDOWN_NS);
    assert!(a.analyse);
    let a = g.intake(false, STREAM_SETTLE_NS, false, 10_000_000_000);
    assert!(!a.analyse);
}

#[test]
fn only_long_loud_utterances_are_shipped() {
    assert_eq!(capture_step(Some(MIN_UTTERANCE_SAMPLES), true, true, false), CaptureStep::Ship);
    assert_eq!(capture_step(Some(MIN_UTTERANCE_SAMPLES - 1), true, true, false), CaptureStep::DropShort);
    assert_eq!(capture_step(Some(MIN_UTTERANCE_SAMPLES), false, true, false), CaptureStep::DropNoise);
    assert_eq!(capture_step(None, false, true, false), CaptureStep::Ended);
    assert_eq!(capture_step(None, false, false, true), CaptureStep::Started);
    assert_eq!(capture_step(None, false, true, true), CaptureStep::Quiet);
    assert_eq!(shown_after(CaptureStep::Ship), Some("thinking"));
    assert_eq!(shown_after(CaptureStep::DropNoise), Some("idle"));
    assert_eq!(shown_after(CaptureStep::Started), Some("listening"));
    assert_eq!(shown_after(CaptureStep::Quiet), None);
}

// ---------------------------------------------------------------------
// The worker
// ---------------------------------------------------------------------

#[test]
fn a_worker_that_keeps_crashing_is_given_up() {
    let mut w = WorkerLifecycle::new(0);
    assert_eq!(w.ensure_running(ChildState::NoChild, 1), Launch::Spawn);
    w.spawned();
    assert_eq!(w.ensure_running(ChildState::Alive, 2), Launch::Running);
    assert_eq!(w.ensure_running(ChildState::Exited, 3), Launch::Spawn);
    assert_eq!(w.restart_count, 1);
    w.spawned();
    assert_eq!(w.ensure_running(ChildState::Exited, 4), Launch::GaveUp);
    assert!(!w.available);
    assert_eq!(w.ensure_running(ChildState::NoChild, 5 + CRASH_WINDOW_NS), Launch::Unavailable);
}

#[test]
fn crashes_far_apart_are_forgiven() {
    let mut w = WorkerLifecycle::new(0);
    w.record_crash(10);
    assert_eq!(w.ensure_running(ChildState::NoChild, 10 + CRASH_WINDOW_NS), Launch::Spawn);
    assert_eq!(w.restart_count, 0);
    assert!(w.first_crash.is_none());
}

#[test]
fn idle_and_unhealthy_workers_are_handled_at_the_tick() {
    let mut w = WorkerLifecycle::new(0);
    w.note_request(100);
    assert!(!w.is_idle(50, 150));
    assert!(w.is_idle(50, 151));
    assert_eq!(health_tick(false, false, true), TickAction::Nothing);
    assert_eq!(health_tick(true, false, true), TickAction::RecordCrash);
    assert_eq!(health_tick(true, true, true), TickAction::Unload);
    assert_eq!(health_tick(true, true, false), TickAction::Nothing);
}

#[test]
fn frames_carry_their_length_first() {
    let f = frame(b"hi!");
    assert_eq!(f, vec![3, 0, 0, 0, b'h', b'i', b'!']);
    assert_eq!(frame_length([3, 0, 0, 0]), 3);
    assert_eq!(frame_length([0, 1, 0, 0]), 256);
}

#[test]
fn speech_audio_is_decoded_from_the_reply() {
    assert_eq!(tts_audio(None, Some("aGk=")), Ok(b"hi".to_vec()));
    assert_eq!(tts_audio(Some("\"boom\""), Some("aGk=")), Err("worker TTS error: \"boom\"".to_string()));
    assert_eq!(tts_audio(None, None), Err("worker TTS response missing audio field".to_string()));
    assert!(tts_audio(None, Some("not base64!")).unwrap_err().starts_with("failed to decode TTS audio: "));
}

// ---------------------------------------------------------------------
// Windows and compositors
// ---------------------------------------------------------------------

#[test]
fn hinted_compositors_are_tried_first() {
    assert_eq!(
        wayland_candidates(false, true, false),
        vec![Compositor::Hyprland, Compositor::Niri, Compositor::Sway]
    );
    assert_eq!(
        wayland_candidates(false, false, false),
        vec![Compositor::Niri, Compositor::Hyprland, Compositor::Sway]
    );
    assert!(probe_ok(Compositor::Niri, Some("[]")));
    assert!(!probe_ok(Compositor::Hyprland, Some("[]")));
    assert!(probe_ok(Compositor::Sway, Some("{\"id\":1}")));
    assert!(!probe_ok(Compositor::Sway, None));
    assert!(x11_ok(true, Some("1234")));
    assert!(!x11_ok(false, Some("1234")));
}

const NIRI: &str = r#"[
  {"id":1,"title":"notes","app_id":"foot","pid":10,"workspace_id":2,"is_focused":false},
  {"id":2,"title":"main.rs - mavis","app_id":"code-oss","pid":20,"workspace_id":1,"is_focused":true}
]"#;

#[test]
fn niri_reports_the_focused_window_and_the_list() {
    assert_eq!(niri_focused(NIRI), Some(("code-oss".to_string(), "main.rs - mavis".to_string(), 20)));
    let all = niri_windows(NIRI).unwrap();
    assert_eq!(all.len(), 2);
    assert_eq!(all[0].app_name, "foot");
    assert_eq!(all[0].workspace_id, Some(2));
    assert!(!all[0].is_focused);
    assert!(all[1].is_focused);
    // A window without a focus flag ends the search.
    assert_eq!(niri_focused(r#"[{"title":"x"},{"title":"y","is_focused":true,"app_id":"a","pid":1}]"#), None);
    // A focused window whose application is not text is "unknown".
    assert_eq!(
        niri_focused(r#"[{"title":"y","is_focused":true,"app_id":null,"pid":1}]"#),
        Some(("unknown".to_string(), "y".to_string(), 1))
    );
    let sparse = niri_windows(r#"[{}]"#).unwrap();
    assert_eq!(sparse[0].app_name, "unknown");
    assert_eq!(sparse[0].window_title, "");
    assert_eq!(sparse[0].pid, None);
    assert!(niri_windows("not json").is_none());
    assert!(niri_windows("{}").is_none());
}

#[test]
fn hyprland_reports_the_active_window() {
    assert_eq!(
        hypr_active(r#"{"class":"kitty","title":"zsh","pid":4242}"#),
        Some(("kitty".to_string(), "zsh".to_string(), 4242))
    );
    assert_eq!(hypr_active(r#"{"class":"kitty","title":"zsh"}"#), None);
}

fn obj(members: Vec<(&str, Json)>) -> Json {
    Json::Object(members.into_iter().map(|(k, v)| (k.to_string(), v)).collect())
}

fn text(s: &str) -> Json {
    Json::Str(s.to_string())
}

#[test]
fn compositor_reports_are_read_from_json_values() {
    let focused = obj(vec![
        ("app_id", text("foot")),
        ("title", text("shell")),
        ("pid", Json::Number(Some(9), "9".into())),
        ("is_focused", Json::Bool(true)),
        ("workspace_id", Json::Number(Some(3), "3".into())),
    ]);
    let other = obj(vec![("title", text("x")), ("is_focused", Json::Bool(false))]);
    let list = Json::Array(vec![other, focused]);
    assert_eq!(niri_focused_of(&list), Some(("foot".to_string(), "shell".to_string(), 9)));
    let all = niri_windows_of(&list).unwrap();
    assert_eq!(all.len(), 2);
    assert_eq!(all[0].app_name, "unknown");
    assert_eq!(all[1].workspace_id, Some(3));
    assert!(niri_windows_of(&Json::Null).is_none());
    assert_eq!(niri_focused_of(&Json::Array(vec![Json::Null])), None);

    let hypr = obj(vec![("class", text("kitty")), ("title", text("zsh")), ("pid", Json::Number(Some(42), "42".into()))]);
    assert_eq!(hypr_active_of(&hypr), Some(("kitty".to_string(), "zsh".to_string(), 42)));
    // A pid that is not a whole number is no pid.
    let bad = obj(vec![("class", text("kitty")), ("title", text("zsh")), ("pid", Json::Number(None, "-1".into()))]);
    assert_eq!(hypr_active_of(&bad), None);

    let leaf = obj(vec![
        ("focused", Json::Bool(true)),
        ("app_id", text("mpv")),
        ("name", text("video")),
        ("pid", Json::Number(Some(5), "5".into())),
    ]);
    let root = obj(vec![
        ("focused", Json::Bool(false)),
        ("nodes", Json::Array(vec![])),
        ("floating_nodes", Json::Array(vec![leaf])),
    ]);
    assert_eq!(sway_focused_of(&root), Some(("mpv".to_string(), "video".to_string(), 5)));
}

#[test]
fn socket_lines_are_read_from_json_values() {
    let asked = obj(vec![("intent", text("open_notes"))]);
    assert_eq!(intent_from("{\"intent\":\"open_notes\"}", Some(&asked)), Some("open_notes".to_string()));
    assert_eq!(intent_from("{x", Some(&Json::Null)), Some("unknown".to_string()));
    assert_eq!(intent_from("{x ", None), Some("{x".to_string()));
    // A line not starting with a brace is taken as it stands.
    assert_eq!(intent_from(" next ", Some(&asked)), Some("next".to_string()));

    let tab = obj(vec![("url", text("https://example.org/a")), ("title", text("Example"))]);
    let t = tab_from("{...}", Some(&tab)).unwrap();
    assert_eq!(t.url, "https://example.org/a");
    assert_eq!(t.title, "Example");
    assert_eq!(t.domain, "example.org");
    assert!(tab_from("{...}", None).is_none());
    assert!(tab_from("   ", Some(&tab)).is_none());
    assert!(tab_from("{...}", Some(&obj(vec![("url", text(""))]))).is_none());
}

#[test]
fn sway_is_searched_depth_first() {
    let tree = r#"{"focused":false,"nodes":[
        {"focused":false,"nodes":[],"floating_nodes":[]},
        {"focused":false,"nodes":[
            {"focused":true,"app_id":"foot","name":"shell","pid":77}
        ],"floating_nodes":[]}
    ],"floating_nodes":[]}"#;
    assert_eq!(sway_focused(tree), Some(("foot".to_string(), "shell".to_string(), 77)));
    let floating = r#"{"focused":false,"nodes":[],"floating_nodes":[
        {"focused":true,"app_id":"mpv","name":"video","pid":5}
    ]}"#;
    assert_eq!(sway_focused(floating), Some(("mpv".to_string(), "video".to_string(), 5)));
    // A node without its nodes list ends the search of that node.
    assert_eq!(
        sway_focused(r#"{"focused":false,"floating_nodes":[{"focused":true,"app_id":"a","name":"b","pid":1}]}"#),
        None
    );
}

#[test]
fn polls_report_only_changes() {
    let mut f = ChangeFilter::new();
    assert!(f.offer(&window_key("foot", "shell", 7)));
    assert_eq!(f.last, "foot:shell:7");
    assert!(!f.offer("foot:shell:7"));
    assert!(f.offer("kitty:zsh:8"));
}

#[test]
fn only_telling_directories_point_at_a_project() {
    assert!(telling_cwd("/home/u/src/mavis", "/home/u"));
    assert!(!telling_cwd("/home/u", "/home/u"));
    assert!(!telling_cwd("/", "/home/u"));
    assert!(!telling_cwd("/proc/12/fdinfo", "/home/u"));
    assert!(project_cache_fresh(5, 29_999_999_999, 5));
    assert!(!project_cache_fresh(5, 30_000_000_000, 5));
    assert!(!project_cache_fresh(5, 0, 6));
}

#[test]
fn process_trees_are_built_from_stat_lines() {
    assert_eq!(ppid_from_stat("1234 (bash) S 1000 1234 1234 0"), Some(1000));
    assert_eq!(ppid_from_stat("99 (my (odd) prog) R 42 1 1"), Some(42));
    assert_eq!(ppid_from_stat("99 (x) R"), None);
    assert_eq!(ppid_from_stat("garbage"), None);
    let mut tree: HashMap<u32, Vec<u32>> = HashMap::new();
    add_child(&mut tree, 1, 10);
    add_child(&mut tree, 1, 11);
    add_child(&mut tree, 10, 100);
    assert_eq!(tree[&1], vec![10, 11]);
    assert_eq!(descendants_from_tree(&tree, 1), vec![10, 11, 100]);
    assert_eq!(descendants_from_tree(&tree, 100), Vec::<u32>::new());
}

#[test]
fn numbers_parse_as_rust_parses_them() {
    assert_eq!(parse_u32("42"), Some(42));
    assert_eq!(parse_u32("+7"), Some(7));
    assert_eq!(parse_u32("4294967295"), Some(u32::MAX));
    assert_eq!(parse_u32("4294967296"), None);
    assert_eq!(parse_u32(""), None);
    assert_eq!(parse_u32("+"), None);
    assert_eq!(parse_u32("-1"), None);
    assert_eq!(parse_u32(" 1"), None);
}

#[test]
fn desktop_files_are_read_for_launchable_applications() {
    let f = "[Desktop Entry]\nName=Firefox\nName[de]=Feuerfuchs\nExec=firefox %u\nType=Application\n[Desktop Action new]\nName=New Window\n";
    let a = parse_desktop_file(f).unwrap();
    assert_eq!(a.name, "Firefox");
    assert_eq!(a.command, "firefox");
    assert!(parse_desktop_file("[Desktop Entry]\nName=X\nExec=x\nNoDisplay=TRUE\n").is_none());
    assert!(parse_desktop_file("[Desktop Entry]\nName=X\nExec=x\nType=Link\n").is_none());
    assert!(parse_desktop_file("[Desktop Entry]\nName=X\n").is_none());
    assert_eq!(strip_field_codes("  code  --new %F   %u x"), "code --new x");
}

#[test]
fn the_first_directory_with_an_application_wins() {
    let mut c = AppCatalog::new();
    assert!(c.first_sighting("firefox"));
    c.add_desktop_file("[Desktop Entry]\nName=Firefox\nExec=firefox\n");
    assert!(!c.first_sighting("firefox"));
    assert!(c.first_sighting("foot"));
    c.add_desktop_file("not a desktop file");
    assert_eq!(c.apps.len(), 1);
    assert_eq!(c.seen, vec!["firefox".to_string(), "foot".to_string()]);
}

#[test]
fn shortcuts_and_bundles_become_applications() {
    let a = shortcut_entry("Firefox", "C:\\Start\\Firefox.lnk").unwrap();
    assert_eq!(a.command, "cmd /c start \"\" \"C:\\Start\\Firefox.lnk\"");
    assert!(shortcut_entry("Uninstall Firefox", "x").is_none());
    assert!(shortcut_entry("Firefox Help", "x").is_none());
    assert_eq!(mac_app_entry("Safari").command, "open -a \"Safari\"");
}

#[test]
fn small_platform_facts() {
    let mut png = vec![0x89, 0x50, 0x4E, 0x47, 0x0D, 0x0A, 0x1A, 0x0A];
    png.extend_from_slice(&[0, 0, 0, 13, b'I', b'H', b'D', b'R', 0, 0, 1, 0, 0, 0, 0, 200]);
    assert_eq!(parse_png_dimensions(&png), Some((256, 200)));
    assert_eq!(parse_png_dimensions(&png[..20]), None);
    assert_eq!(branch_from_head("ref: refs/heads/main\n"), "main");
    assert_eq!(branch_from_head("0123456789abcdef\n"), "01234567");
    assert_eq!(Platform::detect("linux"), Some(Platform::Linux));
    assert_eq!(Platform::detect("plan9"), None);
}

// ---------------------------------------------------------------------
// Sockets, calendar, controls, interface
// ---------------------------------------------------------------------

#[test]
fn hotkey_lines_name_intents() {
    assert_eq!(hotkey_intent("  screenshot  "), Some("screenshot".to_string()));
    assert_eq!(hotkey_intent(r#"{"intent":"toggle_listen"}"#), Some("toggle_listen".to_string()));
    assert_eq!(hotkey_intent(r#"{"other":1}"#), Some("unknown".to_string()));
    assert_eq!(hotkey_intent("{not json "), Some("{not json".to_string()));
    assert_eq!(hotkey_intent("   "), None);
}

#[test]
fn browser_lines_describe_tabs() {
    let t = browser_tab(r#"{"url":"https://docs.rs/verus?x=1","title":"Docs"}"#).unwrap();
    assert_eq!(t.domain, "docs.rs");
    assert_eq!(t.title, "Docs");
    assert!(browser_tab(r#"{"title":"no url"}"#).is_none());
    assert!(browser_tab("garbage").is_none());
    assert_eq!(browser_tab(r#"{"url":"x"}"#).unwrap().title, "");
    assert_eq!(extract_domain("http://a.b#c"), "a.b");
}

#[test]
fn the_next_calendar_event_is_found() {
    let ics = "BEGIN:VCALENDAR\r\nBEGIN:VEVENT\r\nSUMMARY:Stand\r\n up\r\nDTSTART:20300101T000000Z\r\nEND:VEVENT\r\n\
               BEGIN:VEVENT\r\nSUMMARY:Weekly\r\nRRULE:FREQ=WEEKLY\r\nDTSTART:20291231T000000Z\r\nEND:VEVENT\r\n\
               BEGIN:VEVENT\r\nSUMMARY:Past\r\nDTSTART:20200101T000000Z\r\nEND:VEVENT\r\nEND:VCALENDAR\r\n";
    let e = next_event_from_ics(ics, 1_893_456_000 - 3600, 0).unwrap();
    assert_eq!(e.summary, "Standup");
    assert_eq!(e.minutes_until, 60);
    assert!(!e.all_day);
    assert!(next_event_from_ics(ics, 1_893_456_000, 0).is_none());
    assert_eq!(parse_dtstart("DTSTART", "20300101T000000Z"), Some((1_893_456_000, false)));
    assert_eq!(parse_dtstart("DTSTART;VALUE=DATE", "2030"), None);
    assert_eq!(minutes_until(1000 + 120, 1000, 500_000_000), 1);
    assert_eq!(minutes_until(1000, 2000, 0), 0);
    assert_eq!(unfold("A\r\n B\nC").iter().collect::<String>(), "AB\nC");
}

#[test]
fn system_operations_map_to_commands() {
    match control_command(Some("volume_up"), None, None) {
        Ok(ControlCommand::Shell { command, done }) => {
            assert_eq!(command, "pactl set-sink-volume @DEFAULT_SINK@ +5%");
            assert_eq!(done, "Volume up");
        }
        _ => panic!("expected a shell command"),
    }
    match control_command(Some("notify"), None, Some("hi")) {
        Ok(ControlCommand::Notify { title, message }) => {
            assert_eq!(title, "MAVIS");
            assert_eq!(message, "hi");
        }
        _ => panic!("expected a notification"),
    }
    assert!(matches!(control_command(Some("media_next"), None, None), Ok(ControlCommand::Media("next"))));
    assert_eq!(control_command(Some("warp"), None, None).err().unwrap(), "unknown system op: warp");
    assert_eq!(control_command(None, None, None).err().unwrap(), "unknown system op: unknown");
    assert_eq!(mpris_member("play-pause"), "org.mpris.MediaPlayer2.Player.PlayPause");
    assert_eq!(media_done("next", true), "Media next via playerctl");
    assert_eq!(media_done("next", false), "Media next via dbus-send");
    assert_eq!(notification_done("MAVIS", "hi"), "Notification: MAVIS \u{2014} hi");
}

#[test]
fn the_orb_follows_the_assistant() {
    assert_eq!(orb_state_from("listening"), OrbState::Listening);
    assert_eq!(orb_state_from("bogus"), OrbState::Idle);
    assert_eq!(state_color(OrbState::Speaking), (50, 255, 150));
    assert!(speaking_after("speaking", false));
    assert!(!speaking_after("idle", true));
    assert!(speaking_after("thinking", true));
    assert!(interrupts_speech(EventType::UserIntent, true));
    assert!(!interrupts_speech(EventType::UserIntent, false));
    assert!(!interrupts_speech(EventType::PlanReady, true));
}

#[test]
fn a_transcription_becomes_an_intent_silence_or_an_error() {
    assert_eq!(transcription_outcome(Some("open firefox")), Transcribed::Heard("open firefox".to_string()));
    assert_eq!(transcription_outcome(Some("")), Transcribed::Silence);
    assert_eq!(transcription_outcome(None), Transcribed::Failed);
}

#[test]
fn an_orb_position_is_two_trimmed_signed_numbers() {
    assert_eq!(orb_position("1750,60"), Some((1750, 60)));
    assert_eq!(orb_position(" -20 , +35 "), Some((-20, 35)));
    assert_eq!(orb_position("-9223372036854775808,0"), Some((i64::MIN, 0)));
    assert_eq!(orb_position("9223372036854775808,0"), None);
    assert_eq!(orb_position("1750"), None);
    assert_eq!(orb_position("1750,"), None);
    assert_eq!(orb_position("x,60"), None);
    assert_eq!(orb_position("1,2,3"), None);
}

fn vad_limits() -> VadLimits {
    VadLimits {
        min_speech_frames: 3,
        soft_max_frames: 5,
        silence_frames: 4,
        grace_silence_frames: 2,
        hard_max_samples: 10_000,
    }
}

#[test]
fn speech_starts_after_enough_loud_frames_and_ends_after_a_pause() {
    let lim = vad_limits();
    let mut c = VadCounts::new();
    for _ in 0..2 {
        let (n, end) = vad_step(c, &lim, true, 100);
        assert!(!n.is_speaking);
        assert_eq!(end, None);
        c = n;
    }
    let (n, end) = vad_step(c, &lim, true, 100);
    assert!(n.is_speaking);
    assert_eq!(n.speech_frames, 3);
    assert_eq!(end, None);
    c = n;
    for k in 1..4 {
        let (n, end) = vad_step(c, &lim, false, 100);
        assert_eq!(n.silence_frames, k);
        assert_eq!(end, None);
        c = n;
    }
    let (_, end) = vad_step(c, &lim, false, 100);
    assert_eq!(end, Some(VadEnd::Silence));
}

#[test]
fn long_speech_ends_on_the_shorter_grace_pause_or_the_hard_ceiling() {
    let lim = vad_limits();
    let mut c = VadCounts::new();
    for _ in 0..5 {
        c = vad_step(c, &lim, true, 100).0;
    }
    assert!(c.past_soft_ceiling);
    let (c1, end) = vad_step(c, &lim, false, 100);
    assert_eq!(end, None);
    let (_, end) = vad_step(c1, &lim, false, 100);
    assert_eq!(end, Some(VadEnd::Grace));
    let (_, end) = vad_step(c, &lim, true, 10_000);
    assert_eq!(end, Some(VadEnd::HardCeiling));
}

#[test]
fn quiet_frames_before_speech_wear_the_count_down() {
    let lim = vad_limits();
    let c = VadCounts { speech_frames: 2, silence_frames: 0, is_speaking: false, past_soft_ceiling: false };
    let (n, end) = vad_step(c, &lim, false, 50_000);
    assert_eq!(n.speech_frames, 1);
    assert_eq!(end, None);
    let (n, _) = vad_step(VadCounts::new(), &lim, false, 0);
    assert_eq!(n.speech_frames, 0);
}

#[test]
fn a_health_reply_is_ok_only_when_its_status_says_so() {
    assert!(health_reply_ok(r#"{"payload":{"status":"ok"}}"#));
    assert!(!health_reply_ok(r#"{"payload":{"status":"busy"}}"#));
    assert!(!health_reply_ok(r#"{"payload":{"status":true}}"#));
    assert!(!health_reply_ok(r#"{"status":"ok"}"#));
    assert!(!health_reply_ok("not json"));
}

#[test]
fn a_speech_reply_gives_its_audio_or_says_what_went_wrong() {
    assert_eq!(tts_reply(r#"{"payload":{"result":{"audio":"aGk="}}}"#), Ok(b"hi".to_vec()));
    assert_eq!(
        tts_reply(r#"{"payload":{"error":"boom","result":{"audio":"aGk="}}}"#),
        Err("worker TTS error: \"boom\"".to_string())
    );
    assert_eq!(
        tts_reply(r#"{"payload":{"error":{"code":7,"why":"x"}}}"#),
        Err("worker TTS error: {\"code\":7,\"why\":\"x\"}".to_string())
    );
    assert_eq!(tts_reply(r#"{"payload":{"error":null}}"#), Err("worker TTS error: null".to_string()));
    assert_eq!(
        tts_reply(r#"{"payload":{"result":{}}}"#),
        Err("worker TTS response missing audio field".to_string())
    );
    assert!(tts_reply(r#"{"payload":{"result":{"audio":"!!"}}}"#).unwrap_err().starts_with("failed to decode TTS audio: "));
    assert!(tts_reply("not json").is_err());
}

#[test]
fn a_transcription_request_carries_the_audio_in_base64() {
    assert_eq!(
        stt_request(b"hi"),
        r#"{"payload":{"audio":"aGk=","request_type":"stt"},"type":"WorkerRequest"}"#
    );
    assert_eq!(
        stt_request(&[]),
        r#"{"payload":{"audio":"","request_type":"stt"},"type":"WorkerRequest"}"#
    );
}

#[test]
fn a_transcription_reply_gives_its_text() {
    assert_eq!(stt_reply_text(r#"{"payload":{"result":{"text":"hello"}}}"#), Some("hello".to_string()));
    assert_eq!(stt_reply_text(r#"{"payload":{"result":{"text":""}}}"#), Some(String::new()));
    assert_eq!(stt_reply_text(r#"{"payload":{"result":{"text":3}}}"#), None);
    assert_eq!(stt_reply_text(r#"{"payload":{}}"#), None);
    assert_eq!(stt_reply_text("garbage"), None);
}

#[test]
fn a_request_is_retried_once_after_a_crash() {
    assert_eq!(REQUEST_ATTEMPTS, 2);
    assert_eq!(request_step(1, true), RequestStep::Deliver);
    assert_eq!(request_step(1, false), RequestStep::CrashAndRetry);
    assert_eq!(request_step(2, false), RequestStep::CrashAndFail);
}

#[test]
fn transcription_gets_five_tries_the_first_one_long() {
    assert_eq!(STT_ATTEMPTS, 5);
    assert_eq!(stt_attempt_limit_secs(1), 300);
    assert_eq!(stt_attempt_limit_secs(2), 60);
    assert_eq!(stt_next(3, true), SttNext::Deliver);
    assert_eq!(stt_next(4, false), SttNext::PauseAndRetry);
    assert_eq!(stt_next(5, false), SttNext::PauseAndGiveUp);
}
