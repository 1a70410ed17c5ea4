use mavis_core::memory::entities::{link_key_of, observed, EntityKind};
use mavis_core::memory::episodic::{event_type_label, is_persisted};
use mavis_core::memory::recall::{build_fts_query, fallback_search, memory_to_record, purge_cutoffs, score_importance};
use mavis_core::memory::working::{is_plausible_name, WorkingMemory, MAX_EVENTS};
use mavis_core::models::EventType;

#[test]
fn names_must_look_like_names() {
    assert!(is_plausible_name("Alice"));
    assert!(is_plausible_name("O'Neil"));
    assert!(is_plausible_name("Anne-Marie"));
    assert!(!is_plausible_name(""));
    assert!(!is_plausible_name("-Ann"));
    assert!(!is_plausible_name("R2D2"));
    assert!(!is_plausible_name("abcdefghijklmnopqrstuvwxyzabcd"));
}

#[test]
fn working_memory_keeps_the_latest_fifty_events() {
    let mut wm: WorkingMemory<u32, String> = WorkingMemory::new();
    for i in 0..60 {
        wm.push_event(i);
    }
    assert_eq!(wm.events.len(), MAX_EVENTS);
    assert_eq!(wm.events[0], 10);
    let recent = wm.recent_events(3);
    assert_eq!(recent, vec![&57, &58, &59]);
}

#[test]
fn recent_context_copies_the_tail() {
    let mut wm: WorkingMemory<String, String> = WorkingMemory::new();
    for w in ["a", "b", "c"] {
        wm.push_event(w.to_string());
    }
    assert_eq!(wm.recent_context(2), vec!["b".to_string(), "c".to_string()]);
    assert_eq!(wm.recent_context(10).len(), 3);
    assert!(wm.recent_context(0).is_empty());
}

#[test]
fn a_stored_name_is_checked_and_marked() {
    let mut wm: WorkingMemory<u32, String> = WorkingMemory::new();
    assert!(wm.set_user_name("Alice".into()));
    assert!(wm.user_name_verified);
    assert!(!wm.set_user_name("not a name".into()));
    assert_eq!(wm.user_name.as_deref(), Some("Alice"));
    // A name from an older build, not marked, is dropped.
    wm.user_name_verified = false;
    assert_eq!(wm.sanitize(), Some("Alice".to_string()));
    assert!(wm.user_name.is_none());
}

#[test]
fn busy_means_a_plan_is_running() {
    let mut wm: WorkingMemory<u32, String> = WorkingMemory::new();
    assert!(!wm.is_busy());
    wm.set_intent("hi".into());
    assert!(!wm.is_busy());
    wm.clear_intent();
    wm.set_active_plan("plan".into());
    assert!(wm.is_busy());
    wm.clear_active_plan();
    assert!(!wm.is_busy());
}

#[test]
fn search_queries_drop_short_and_common_words() {
    assert_eq!(
        build_fts_query("What is my favourite editor?"),
        Some("\"favourite\" OR \"editor\"".to_string())
    );
    assert_eq!(build_fts_query("is it on?"), None);
    let long = "alpha bravo charlie delta echoes foxtrot golfer hotel indigo";
    assert_eq!(build_fts_query(long).unwrap().matches(" OR ").count(), 7);
}

#[test]
fn importance_follows_what_was_said() {
    assert_eq!(score_importance("mavis", "My name is Alice"), 2);
    assert_eq!(score_importance("user", "My name is Alice"), 9);
    assert_eq!(score_importance("user", "what time is it"), 3);
    assert_eq!(score_importance("user", "it rains today?"), 3);
    assert_eq!(score_importance("user", "open firefox"), 1);
    assert_eq!(score_importance("user", "the build broke again this morning"), 5);
}

#[test]
fn only_worthwhile_utterances_are_recorded() {
    assert_eq!(memory_to_record("user", "  open firefox "), None);
    assert_eq!(memory_to_record("user", "   "), None);
    assert_eq!(memory_to_record("user", " I prefer dark themes "), Some(("I prefer dark themes".to_string(), 9)));
    assert_eq!(memory_to_record("mavis", "Done."), Some(("Done.".to_string(), 2)));
}

#[test]
fn purge_cutoffs_follow_the_retention_policy() {
    let now = 100 * 86400;
    assert_eq!(
        purge_cutoffs(now),
        vec![(2, now - 7 * 86400), (4, now - 30 * 86400), (7, now - 90 * 86400)]
    );
}

#[test]
fn episodes_record_the_conversation_only() {
    assert!(is_persisted(EventType::UserIntent));
    assert!(!is_persisted(EventType::ContextUpdate));
    assert_eq!(event_type_label(EventType::UserIntent), "UserIntent");
}

#[test]
fn entities_are_named_and_linked_in_order() {
    assert_eq!(EntityKind::Project.as_str(), "project");
    assert_eq!(observed("  firefox "), Some("firefox".to_string()));
    assert_eq!(observed("   "), None);
    let ab = link_key_of("mavis", EntityKind::Project, "code", EntityKind::App);
    let ba = link_key_of("code", EntityKind::App, "mavis", EntityKind::Project);
    assert_eq!(ab, ba);
    assert!(ab.is_some());
}

#[test]
fn a_refused_name_leaves_memory_as_it_was() {
    let mut wm: WorkingMemory<u32, String> = WorkingMemory::new();
    wm.push_event(7);
    wm.current_intent = Some("hello".to_string());
    assert!(wm.set_user_name("Alice".into()));
    assert!(!wm.set_user_name("not a name".into()));
    assert_eq!(wm.user_name.as_deref(), Some("Alice"));
    assert!(wm.user_name_verified);
    assert_eq!(wm.current_intent.as_deref(), Some("hello"));
    assert_eq!(wm.events, vec![7]);
}

#[test]
fn an_overfull_restored_ring_loses_only_its_oldest_event() {
    let mut wm: WorkingMemory<u32, String> = WorkingMemory::new();
    wm.events = (0..(MAX_EVENTS as u32 + 10)).collect();
    wm.push_event(999);
    assert_eq!(wm.events.len(), MAX_EVENTS + 10);
    assert_eq!(wm.events.front(), Some(&1));
    assert_eq!(wm.events.back(), Some(&999));
}

#[test]
fn past_summaries_are_searched_only_when_recall_found_nothing() {
    assert_eq!(fallback_search(Some(0), "docker compose"), build_fts_query("docker compose"));
    assert!(fallback_search(Some(0), "docker compose").is_some());
    assert_eq!(fallback_search(Some(2), "docker compose"), None);
    assert_eq!(fallback_search(None, "docker compose"), None);
}
