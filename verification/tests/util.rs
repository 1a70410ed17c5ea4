use mavis_core::util::{
    supervise_step, truncate_bytes, RunOutcome, Supervision, MAX_SUBSYSTEM_RESTARTS,
};

#[test]
fn ascii_shorter_than_limit_is_unchanged() {
    assert_eq!(truncate_bytes("hello", 20), "hello");
}

#[test]
fn ascii_longer_than_limit_is_cut() {
    assert_eq!(truncate_bytes("hello world", 5), "hello");
}

#[test]
fn exact_length_is_unchanged() {
    assert_eq!(truncate_bytes("hello", 5), "hello");
}

#[test]
fn empty_string() {
    assert_eq!(truncate_bytes("", 10), "");
    assert_eq!(truncate_bytes("", 0), "");
}

#[test]
fn does_not_split_multibyte_character() {
    let s = "aaaaaaaaaaaaaaaaaaa日本語more";
    let out = truncate_bytes(s, 20);
    assert_eq!(out, "aaaaaaaaaaaaaaaaaaa");
    assert!(out.len() <= 20);
}

#[test]
fn handles_curly_apostrophe_at_boundary() {
    let s = "that\u{2019}s the clipboard contents here";
    for limit in 0..s.len() + 4 {
        let out = truncate_bytes(s, limit);
        assert!(out.len() <= limit.min(s.len()));
        assert!(s.starts_with(out));
    }
}

#[test]
fn every_limit_is_safe_for_multibyte_text() {
    for s in ["日本語", "ééé", "café — naïve…", "🙂🙂🙂"] {
        for limit in 0..s.len() + 4 {
            let out = truncate_bytes(s, limit);
            assert!(s.starts_with(out), "{:?} limit {}", s, limit);
        }
    }
}

#[test]
fn zero_limit_yields_empty() {
    assert_eq!(truncate_bytes("日本語", 0), "");
}

#[test]
fn truncation_keeps_the_longest_whole_prefix() {
    assert_eq!(truncate_bytes("🙂🙂🙂", 7), "🙂");
    assert_eq!(truncate_bytes("🙂🙂🙂", 8), "🙂🙂");
    assert_eq!(truncate_bytes("aé", 2), "a");
}

#[test]
fn a_panicking_subsystem_is_restarted_until_the_limit() {
    let mut restarts = 0;
    let mut runs = 1;
    loop {
        let (s, r) = supervise_step(restarts, RunOutcome::Panicked, true);
        restarts = r;
        if s == Supervision::Stop {
            break;
        }
        runs += 1;
    }
    assert_eq!(runs, MAX_SUBSYSTEM_RESTARTS);
    assert_eq!(restarts, MAX_SUBSYSTEM_RESTARTS);
}

#[test]
fn a_clean_exit_or_a_closed_bus_is_not_restarted() {
    let (s, _) = supervise_step(0, RunOutcome::Returned, true);
    assert_eq!(s, Supervision::Stop);
    let (s, _) = supervise_step(0, RunOutcome::Panicked, false);
    assert_eq!(s, Supervision::Stop);
    let (s, r) = supervise_step(3, RunOutcome::Cancelled, true);
    assert_eq!((s, r), (Supervision::Stop, 3));
    let (s, r) = supervise_step(1, RunOutcome::Panicked, true);
    assert_eq!((s, r), (Supervision::Restart, 2));
}
