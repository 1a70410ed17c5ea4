use mavis_core::context::{BrowserTab, ContextSnapshot, ProjectInfo, WindowInfo};
use mavis_core::engine::{extract_user_name, file_in_title, ContextEngine, Incoming};
use mavis_core::memory::entities::EntityKind;
use mavis_core::memory::working::{WorkingMemory, MAX_EVENTS};

type Engine = ContextEngine<u32, String>;

fn engine(now: u64) -> Engine {
    ContextEngine::new(WorkingMemory::new(), now)
}

fn snapshot(app: &str, title: &str, project: Option<&str>, clip: Option<&str>) -> ContextSnapshot {
    ContextSnapshot {
        active_window: Some(WindowInfo {
            app_name: app.into(),
            window_title: title.into(),
            pid: Some(7),
            workspace_id: Some(1),
            is_focused: true,
        }),
        open_windows: vec![],
        active_workspace: Some(1),
        project: project.map(|p| ProjectInfo {
            name: p.into(),
            path: format!("/home/u/{}", p),
            git_branch: None,
        }),
        next_event: None,
        clipboard_text: clip.map(|c| c.to_string()),
        captured_at: 42,
    }
}

#[test]
fn names_are_learned_from_introductions() {
    assert_eq!(extract_user_name("my name is alice"), Some("Alice".to_string()));
    assert_eq!(extract_user_name("Hi. Call me Bob, please."), Some("Bob".to_string()));
    assert_eq!(extract_user_name("call me maybe"), None);
    assert_eq!(extract_user_name("I'm called Anne-Marie."), Some("Anne-Marie".to_string()));
    assert_eq!(extract_user_name("is my name is Tom?"), None);
    assert_eq!(extract_user_name("my name is Tom and I code"), Some("Tom".to_string()));
    assert_eq!(extract_user_name("my name is Tom Smith"), None);
    assert_eq!(extract_user_name("I am using firefox"), None);
}

#[test]
fn files_are_read_from_window_titles() {
    assert_eq!(file_in_title("lib.rs - mavis - Code"), Some("lib.rs".to_string()));
    assert_eq!(file_in_title("(notes.md) — Editor"), Some("notes.md".to_string()));
    assert_eq!(file_in_title("a.b - x"), None);
    assert_eq!(file_in_title("/usr/lib/x.so"), None);
}

#[test]
fn a_user_intent_is_remembered_and_names_are_learned() {
    let mut e = engine(0);
    let step = e.process_event(1, Incoming::UserIntent { text: "my name is alice".into() }, 10);
    assert_eq!(e.working.current_intent.as_deref(), Some("my name is alice"));
    assert_eq!(e.working.user_name.as_deref(), Some("Alice"));
    assert!(e.working.user_name_verified);
    assert_eq!(step.remember, Some(("user".to_string(), "my name is alice".to_string())));
    assert!(step.persist_episode);
    assert_eq!(e.working.events, vec![1]);
}

#[test]
fn plans_are_held_until_their_actions_complete() {
    let mut e = engine(0);
    let step = e.process_event(
        1,
        Incoming::PlanReady { plan: Some("say hi".into()), spoken: Some("Hi.".into()) },
        10,
    );
    assert_eq!(e.working.active_plan.as_deref(), Some("say hi"));
    assert_eq!(step.remember, Some(("mavis".to_string(), "Hi.".to_string())));
    e.process_event(2, Incoming::ActionComplete, 20);
    assert!(e.working.active_plan.is_none());
    assert!(e.working.current_intent.is_none());
    assert_eq!(e.working.events, vec![1, 2]);
}

#[test]
fn a_context_update_is_logged_and_its_entities_observed_once() {
    let mut e = engine(0);
    let snap = snapshot("code-oss", "main.rs - mavis - Code - OSS", Some("mavis"), Some("hello"));
    let step = e.process_event(1, Incoming::ContextUpdate(Some(snap.clone())), 10);
    assert_eq!(step.context_changed.as_deref(), Some("app=code-oss, project=mavis, clipboard=5 chars"));
    assert_eq!(
        step.observe,
        vec![
            ("code-oss".to_string(), EntityKind::App),
            ("mavis".to_string(), EntityKind::Project),
            ("main.rs".to_string(), EntityKind::File),
        ]
    );
    assert_eq!(step.link.len(), 2);
    assert_eq!(e.working.context_timestamp, Some(42));
    // Context updates are not part of the conversation ring.
    assert!(e.working.events.is_empty());
    // The same context again is neither logged nor observed again.
    let step = e.process_event(2, Incoming::ContextUpdate(Some(snap)), 20);
    assert!(step.context_changed.is_none());
    assert!(step.observe.is_empty());
    assert!(step.link.is_empty());
}

#[test]
fn the_ring_keeps_only_the_latest_events() {
    let mut e = engine(0);
    for i in 0..(MAX_EVENTS as u32 + 5) {
        e.process_event(i, Incoming::SystemWake, 10);
    }
    assert_eq!(e.working.events.len(), MAX_EVENTS);
    assert_eq!(e.working.events[0], 5);
}

#[test]
fn interface_states_and_tabs_are_kept() {
    let mut e = engine(0);
    e.process_event(1, Incoming::UiStateChange { state: Some("listening".into()) }, 10);
    assert_eq!(e.working.ui_state.as_deref(), Some("listening"));
    let tab = BrowserTab { url: "https://a.b/c".into(), title: "C".into(), domain: "a.b".into() };
    e.process_event(2, Incoming::BrowserUpdate(Some(tab.clone())), 20);
    assert_eq!(e.working.browser_tab, Some(tab));
    assert!(e.working.events.is_empty());
}

#[test]
fn saves_are_spaced_out() {
    let mut e = engine(20_000_000_000);
    let step = e.process_event(1, Incoming::SystemWake, 20_000_000_001);
    assert!(step.save);
    let step = e.process_event(2, Incoming::SystemWake, 20_000_000_002);
    assert!(!step.save);
}
